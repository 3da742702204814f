//! The command queue. The user interface and the input loop push commands; they run on the game
//! thread, in the order in which they were pushed.

use vstd::prelude::*;

verus! {

/// A queued action, run on the game thread. Numbers are single-precision bit patterns.
#[derive(Clone, Copy, Debug, PartialEq, Eq, Structural)]
pub enum Cmd {
    CineOn,
    CineOff,
    Pause,
    Freeze,
    Unfreeze,
    ImguiInput,
    GhostMode,
    Fly,
    Walk,
    God,
    Ungod,
    Fov(u32),
    PawnHide,
    PawnShow,
    PawnNoCol,
    PawnCol,
    CamoOn,
    CamoOff,
    CamoToggle,
    OvershieldOn,
    OvershieldOff,
    FreezePawn,
    UnfreezePawn,
    ShieldBreak,
    NightVis,
    RechargePP,
    BloodHuman,
    BloodCov,
    BloodGrunt,
    BloodBrute,
    ScaleGiant,
    ScaleTiny,
    ScaleNormal,
    Teleport,
    RadialBlur,
    Breath,
    FullbodyOn,
    FullbodyOff,
    Slomo(u32),
    SimFreeze,
    SimUnfreeze,
    DiagTime,
    DiagMission,
    NightVision(bool),
    FadeOut,
    FadeIn,
}

/// The waiting commands, oldest first, and their number, which can be looked at without the
/// commands.
pub struct Queue {
    pub items: Vec<Cmd>,
    pub pending: usize,
}

impl View for Queue {
    type V = Seq<Cmd>;

    open spec fn view(&self) -> Seq<Cmd> {
        self.items@
    }
}

impl Queue {
    /// The number is that of the commands.
    pub open spec fn wf(&self) -> bool {
        self.pending == self.items@.len()
    }

    /// No command waiting.
    pub fn new() -> (r: Queue)
        ensures
            r.wf(),
            r@ == Seq::<Cmd>::empty(),
    {
        Queue { items: Vec::new(), pending: 0 }
    }
}

/// Add a command at the end.
pub fn push(q: &mut Queue, c: Cmd)
    requires
        old(q).wf(),
    ensures
        final(q).wf(),
        final(q)@ == old(q)@.push(c),
{
    q.items.push(c);
    q.pending = q.items.len();
}

/// Whether any command is waiting.
pub fn has_pending(q: &Queue) -> (r: bool)
    requires
        q.wf(),
    ensures
        r == (q@.len() > 0),
{
    q.pending > 0
}

/// Take all waiting commands, oldest first.
pub fn take_all(q: &mut Queue) -> (r: Vec<Cmd>)
    requires
        old(q).wf(),
    ensures
        r@ == old(q)@,
        final(q)@ == Seq::<Cmd>::empty(),
        final(q).wf(),
{
    let mut out: Vec<Cmd> = Vec::new();
    out.append(&mut q.items);
    q.pending = 0;
    out
}

/// Commands come out in the order in which they went in: what is pushed onto a queue comes out
/// behind what was in it.
pub proof fn law_first_in_first_out(before: Seq<Cmd>, pushed: Seq<Cmd>)
    ensures
        pushed.fold_left(before, |q: Seq<Cmd>, c: Cmd| q.push(c)) == before + pushed,
    decreases pushed.len(),
{
    let f = |q: Seq<Cmd>, c: Cmd| q.push(c);
    if pushed.len() > 0 {
        law_first_in_first_out(before, pushed.drop_last());
        assert(before + pushed =~= (before + pushed.drop_last()).push(pushed.last()));
    } else {
        assert(before + pushed =~= before);
    }
}

} // verus!
