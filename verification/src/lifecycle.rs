//! The life of a mock program, from its start to its end.

use vstd::prelude::*;

verus! {

/// What a mock program does at a time.
#[derive(Clone, Copy, Debug, PartialEq, Eq, Structural)]
pub enum Stage {
    /// Set up the directory that is served (mock server only).
    Preparing,
    /// Bind the listener.
    Binding,
    /// Write the data file.
    Recording,
    /// Accept a connection, and leave it to be served in the background.
    Serving,
    /// Remove the data file.
    Removing,
    /// The program has come to its end.
    Stopped,
    /// The program gives up, with exit code 1.
    Exited,
}

/// The stage after `stage`, given whether what it does succeeded. A connection that cannot be
/// accepted keeps no other from being accepted, and a data file that cannot be removed is left.
pub open spec fn stage_after(stage: Stage, succeeded: bool) -> Stage {
    match stage {
        Stage::Preparing => if succeeded { Stage::Binding } else { Stage::Exited },
        Stage::Binding => if succeeded { Stage::Recording } else { Stage::Exited },
        Stage::Recording => if succeeded { Stage::Serving } else { Stage::Exited },
        Stage::Serving => Stage::Serving,
        Stage::Removing => Stage::Stopped,
        Stage::Stopped => Stage::Stopped,
        Stage::Exited => Stage::Exited,
    }
}

impl Stage {
    /// The first stage of a program, which may have a directory to set up.
    pub fn first(serves_directory: bool) -> (r: Stage)
        ensures
            r == (if serves_directory { Stage::Preparing } else { Stage::Binding }),
    {
        if serves_directory {
            Stage::Preparing
        } else {
            Stage::Binding
        }
    }

    /// The stage after this one, given whether what it does succeeded.
    pub fn after(self, succeeded: bool) -> (r: Stage)
        ensures
            r == stage_after(self, succeeded),
    {
        match self {
            Stage::Preparing => if succeeded {
                Stage::Binding
            } else {
                Stage::Exited
            },
            Stage::Binding => if succeeded {
                Stage::Recording
            } else {
                Stage::Exited
            },
            Stage::Recording => if succeeded {
                Stage::Serving
            } else {
                Stage::Exited
            },
            Stage::Serving => Stage::Serving,
            Stage::Removing => Stage::Stopped,
            Stage::Stopped => Stage::Stopped,
            Stage::Exited => Stage::Exited,
        }
    }

    /// The stage after a serving program has been told to shut down.
    pub fn shut_down(self) -> (r: Stage)
        requires
            self is Serving,
        ensures
            r is Removing,
    {
        Stage::Removing
    }
}

/// A moment in the life of a program: its stage, whether its listener is bound, and whether its
/// data file is there.
pub struct Moment {
    pub stage: Stage,
    pub bound: bool,
    pub recorded: bool,
}

/// Whether what the stage of `a` does can lead to `b`.
pub open spec fn done(a: Moment, succeeded: bool, b: Moment) -> bool {
    &&& b.stage == stage_after(a.stage, succeeded)
    &&& b.bound == (a.bound || a.stage is Binding && succeeded)
    &&& b.recorded == if a.stage is Recording {
        a.recorded || succeeded
    } else if a.stage is Removing {
        a.recorded && !succeeded
    } else {
        a.recorded
    }
}

/// Whether `a` is told to shut down and `b` follows.
pub open spec fn told_to_shut_down(a: Moment, b: Moment) -> bool {
    &&& a.stage is Serving
    &&& b.stage is Removing
    &&& b.bound == a.bound
    &&& b.recorded == a.recorded
}

/// Whether `life` is a life that a program can have. It begins with no listener, and with a data
/// file only if an earlier program has left one; if the data file can be removed, that succeeds.
pub open spec fn is_life(life: Seq<Moment>, removable: bool) -> bool {
    &&& life.len() > 0
    &&& life[0].stage is Preparing || life[0].stage is Binding
    &&& !life[0].bound
    &&& forall|i: int|
        #![trigger life[i]]
        0 < i < life.len() ==> {
            ||| told_to_shut_down(life[i - 1], life[i])
            ||| exists|succeeded: bool|
                {
                    &&& #[trigger] done(life[i - 1], succeeded, life[i])
                    &&& life[i - 1].stage is Removing ==> succeeded == removable
                }
        }
}

/// Where no earlier program has left a data file, the file is there only while the listener is
/// bound, so its presence means that the program is ready. While the program serves, the file is
/// there. It is gone when the program has stopped, unless it could not be removed, and a program
/// that gives up leaves none.
pub proof fn law_data_file_means_ready(life: Seq<Moment>, removable: bool, i: int)
    requires
        is_life(life, removable),
        !life[0].recorded,
        0 <= i < life.len(),
    ensures
        life[i].recorded ==> life[i].bound,
        life[i].stage is Serving || life[i].stage is Removing ==> life[i].recorded,
        life[i].stage is Stopped ==> life[i].recorded == !removable,
        life[i].stage is Exited ==> !life[i].recorded,
{
    lemma_life(life, removable, i);
}

/// Whether or not an earlier program has left a data file, while the program serves its listener
/// is bound and the file is there. The file is gone when the program has stopped, unless it could
/// not be removed, and a program that gives up leaves things as it found them.
pub proof fn law_left_data_files(life: Seq<Moment>, removable: bool, i: int)
    requires
        is_life(life, removable),
        0 <= i < life.len(),
    ensures
        life[i].stage is Serving || life[i].stage is Removing ==> life[i].recorded
            && life[i].bound,
        life[i].stage is Stopped ==> life[i].recorded == !removable,
        life[i].stage is Exited ==> life[i].recorded == life[0].recorded,
{
    lemma_life(life, removable, i);
}

/// What holds at each stage.
proof fn lemma_life(life: Seq<Moment>, removable: bool, i: int)
    requires
        is_life(life, removable),
        0 <= i < life.len(),
    ensures
        life[i].stage is Preparing || life[i].stage is Binding || life[i].stage is Recording
            || life[i].stage is Exited ==> life[i].recorded == life[0].recorded,
        life[i].stage is Recording ==> life[i].bound,
        life[i].stage is Serving || life[i].stage is Removing ==> life[i].recorded
            && life[i].bound,
        life[i].stage is Stopped ==> life[i].recorded == !removable && life[i].bound,
    decreases i,
{
    if i > 0 {
        lemma_life(life, removable, i - 1);
        let b = life[i];
        assert(told_to_shut_down(life[i - 1], b) || exists|succeeded: bool|
            {
                &&& #[trigger] done(life[i - 1], succeeded, b)
                &&& life[i - 1].stage is Removing ==> succeeded == removable
            });
    }
}

/// The stage that is reached from `first` when what is done comes out as `outcomes` says.
pub open spec fn stage_reached(first: Stage, outcomes: Seq<bool>) -> Stage
    decreases outcomes.len(),
{
    if outcomes.len() == 0 {
        first
    } else {
        stage_after(stage_reached(first, outcomes.drop_last()), outcomes.last())
    }
}

/// A program sets up its directory, if it has one, binds its listener, writes its data file and
/// serves, in this order. It gives up at the first of these that fails, and once it serves it goes
/// on, whatever becomes of single connections.
pub proof fn law_programs_serve_or_give_up(first: Stage, outcomes: Seq<bool>)
    requires
        first is Preparing || first is Binding,
    ensures
        ({
            let order = if first is Preparing {
                seq![Stage::Preparing, Stage::Binding, Stage::Recording]
            } else {
                seq![Stage::Binding, Stage::Recording]
            };
            let stage = stage_reached(first, outcomes);
            if exists|i: int| 0 <= i < outcomes.len() && i < order.len() && !(#[trigger] outcomes[i]) {
                stage is Exited
            } else if outcomes.len() < order.len() {
                stage == order[outcomes.len() as int]
            } else {
                stage is Serving
            }
        }),
    decreases outcomes.len(),
{
    if outcomes.len() > 0 {
        let front = outcomes.drop_last();
        law_programs_serve_or_give_up(first, front);
        let n: int = if first is Preparing {
            3
        } else {
            2
        };
        assert(outcomes.last() == outcomes[outcomes.len() - 1]);
        if exists|i: int| 0 <= i < front.len() && i < n && !(#[trigger] front[i]) {
            let i = choose|i: int| 0 <= i < front.len() && i < n && !(#[trigger] front[i]);
            assert(!outcomes[i]);
        } else {
            assert forall|i: int| 0 <= i < front.len() && i < n implies #[trigger] outcomes[i] by {
                assert(front[i]);
            }
        }
    }
}

/// After the removal of its data file a program has stopped, whether or not the file is gone, and a
/// program that has stopped or given up does nothing more.
pub proof fn law_programs_end(outcomes: Seq<bool>)
    ensures
        outcomes.len() > 0 ==> stage_reached(Stage::Removing, outcomes) is Stopped,
        stage_reached(Stage::Stopped, outcomes) is Stopped,
        stage_reached(Stage::Exited, outcomes) is Exited,
    decreases outcomes.len(),
{
    if outcomes.len() > 0 {
        law_programs_end(outcomes.drop_last());
        reveal_with_fuel(stage_reached, 2);
    }
}

} // verus!
