use vstd::prelude::*;

verus! {

/// What a symbol asks of the turtle.
#[derive(Clone, Copy, Debug, PartialEq, Eq)]
pub enum Command {
    Forward,
    TurnLeft,
    TurnRight,
    PushState,
    PopState,
    PenUp,
    PenDown,
    Unrecognized(char),
}

/// The command that each symbol stands for.
pub open spec fn command_spec(c: char) -> Command {
    if c == 'f' {
        Command::Forward
    } else if c == '+' {
        Command::TurnLeft
    } else if c == '-' {
        Command::TurnRight
    } else if c == '[' {
        Command::PushState
    } else if c == ']' {
        Command::PopState
    } else if c == '?' {
        Command::PenUp
    } else if c == '!' {
        Command::PenDown
    } else {
        Command::Unrecognized(c)
    }
}

/// Reads a symbol as a turtle command.
pub fn command_of(c: char) -> (r: Command)
    ensures
        r == command_spec(c),
{
    match c {
        'f' => Command::Forward,
        '+' => Command::TurnLeft,
        '-' => Command::TurnRight,
        '[' => Command::PushState,
        ']' => Command::PopState,
        '?' => Command::PenUp,
        '!' => Command::PenDown,
        _ => Command::Unrecognized(c),
    }
}

/// A change of the turtle's place (its position and heading), which the caller
/// computes: one step ahead along the heading, or a turn by the spin angle.
#[derive(Clone, Copy, Debug, PartialEq, Eq)]
pub enum Motion {
    Forward,
    TurnLeft,
    TurnRight,
}

/// A pose: the turtle's place and whether its pen draws.
#[derive(Clone, Copy, Debug, PartialEq)]
pub struct Pose<P> {
    pub place: P,
    pub pen: bool,
}

/// The visible effect of one command: a segment from one place to another, and
/// whether it is drawn.
#[derive(Clone, Copy, Debug, PartialEq)]
pub struct TurtleMovement<P> {
    pub from: P,
    pub to: P,
    pub draw: bool,
}

/// The record of a command that leaves the turtle at `place` without drawing.
pub open spec fn still<P>(place: P) -> TurtleMovement<P> {
    TurtleMovement { from: place, to: place, draw: false }
}

/// The pen after `cmd`, for every command but a restore of a saved pose.
pub open spec fn pen_next(pen: bool, cmd: Command) -> bool {
    match cmd {
        Command::PenUp => false,
        Command::PenDown => true,
        _ => pen,
    }
}

/// What `Turtle::eval` reports.
#[derive(Clone, Copy, Debug, PartialEq)]
pub enum Outcome<P> {
    /// The command was carried out.
    Moved(TurtleMovement<P>),
    /// The symbol is no command: nothing changed.
    Unrecognized(char, TurtleMovement<P>),
    /// A restore was asked with no saved pose: nothing changed, and the run of
    /// commands is broken.
    UnbalancedPop,
}

/// A turtle: its current pose and a stack of saved poses.
pub struct Turtle<P> {
    stack: Vec<Pose<P>>,
    state: Pose<P>,
}

impl<P> TurtleMovement<P> {
    /// A record that leaves the turtle where it stands, without drawing.
    pub fn none(turtle: &Turtle<P>) -> (r: TurtleMovement<P>)
        where
            P: Copy,
        ensures
            r == still(turtle.state().place),
    {
        TurtleMovement { from: turtle.state.place, to: turtle.state.place, draw: false }
    }
}

impl<P: Copy> Turtle<P> {
    /// The current pose.
    pub closed spec fn state(&self) -> Pose<P> {
        self.state
    }

    /// The saved poses, the most recent last.
    pub closed spec fn saved(&self) -> Seq<Pose<P>> {
        self.stack@
    }

    /// `after` is `before` with its pose saved.
    pub open spec fn pushes(before: Self, after: Self) -> bool {
        &&& after.state() == before.state()
        &&& after.saved() == before.saved().push(before.state())
    }

    /// `after` is `before` with its most recently saved pose restored.
    pub open spec fn pops(before: Self, after: Self) -> bool {
        &&& before.saved().len() > 0
        &&& after.state() == before.saved().last()
        &&& after.saved() == before.saved().drop_last()
    }

    /// `after` is `before` with its place moved by `m` through `motion`.
    pub open spec fn moves<F: Fn(P, Motion) -> P>(
        before: Self,
        after: Self,
        motion: F,
        m: Motion,
    ) -> bool {
        &&& motion.ensures((before.state().place, m), after.state().place)
        &&& after.state().pen == before.state().pen
        &&& after.saved() == before.saved()
    }

    /// `after` is `before` with its pen set to `pen`.
    pub open spec fn sets_pen(before: Self, after: Self, pen: bool) -> bool {
        &&& after.state() == Pose { place: before.state().place, pen }
        &&& after.saved() == before.saved()
    }

    /// A turtle at `place` with its pen down and nothing saved.
    pub fn new(place: P) -> (r: Turtle<P>)
        ensures
            r.state() == (Pose { place, pen: true }),
            r.saved() == Seq::<Pose<P>>::empty(),
    {
        Turtle { stack: Vec::new(), state: Pose { place, pen: true } }
    }

    /// Saves the current pose.
    pub fn push(&mut self) -> (r: TurtleMovement<P>)
        ensures
            Self::pushes(*old(self), *final(self)),
            r == still(old(self).state().place),
    {
        self.stack.push(Pose { place: self.state.place, pen: self.state.pen });
        TurtleMovement::none(self)
    }

    /// Restores the most recently saved pose, removing it from the stack.
    pub fn pop(&mut self) -> (r: TurtleMovement<P>)
        requires
            old(self).saved().len() > 0,
        ensures
            Self::pops(*old(self), *final(self)),
            r == (TurtleMovement {
                from: old(self).state().place,
                to: final(self).state().place,
                draw: false,
            }),
    {
        let from = self.state.place;
        match self.stack.pop() {
            Some(saved) => {
                self.state = saved;
            },
            None => {},
        }
        TurtleMovement { from, to: self.state.place, draw: false }
    }

    /// Turns by the spin angle, counterclockwise.
    pub fn turn_left<F: Fn(P, Motion) -> P>(&mut self, motion: &F) -> (r: TurtleMovement<P>)
        requires
            forall|p: P, m: Motion| motion.requires((p, m)),
        ensures
            Self::moves(*old(self), *final(self), *motion, Motion::TurnLeft),
            r == still(final(self).state().place),
    {
        self.state.place = motion(self.state.place, Motion::TurnLeft);
        TurtleMovement::none(self)
    }

    /// Turns by the spin angle, clockwise.
    pub fn turn_right<F: Fn(P, Motion) -> P>(&mut self, motion: &F) -> (r: TurtleMovement<P>)
        requires
            forall|p: P, m: Motion| motion.requires((p, m)),
        ensures
            Self::moves(*old(self), *final(self), *motion, Motion::TurnRight),
            r == still(final(self).state().place),
    {
        self.state.place = motion(self.state.place, Motion::TurnRight);
        TurtleMovement::none(self)
    }

    /// Steps ahead along the heading; the segment is drawn when the pen is down.
    pub fn forward<F: Fn(P, Motion) -> P>(&mut self, motion: &F) -> (r: TurtleMovement<P>)
        requires
            forall|p: P, m: Motion| motion.requires((p, m)),
        ensures
            Self::moves(*old(self), *final(self), *motion, Motion::Forward),
            r == (TurtleMovement {
                from: old(self).state().place,
                to: final(self).state().place,
                draw: old(self).state().pen,
            }),
    {
        let from = self.state.place;
        self.state.place = motion(self.state.place, Motion::Forward);
        TurtleMovement { from, to: self.state.place, draw: self.state.pen }
    }

    /// Lifts the pen: later steps are not drawn.
    pub fn up(&mut self) -> (r: TurtleMovement<P>)
        ensures
            Self::sets_pen(*old(self), *final(self), false),
            r == still(old(self).state().place),
    {
        self.state.pen = false;
        TurtleMovement::none(self)
    }

    /// Lowers the pen: later steps are drawn.
    pub fn down(&mut self) -> (r: TurtleMovement<P>)
        ensures
            Self::sets_pen(*old(self), *final(self), true),
            r == still(old(self).state().place),
    {
        self.state.pen = true;
        TurtleMovement::none(self)
    }

    /// Carries out the command that `symbol` stands for; `motion` computes the
    /// new place for a step or a turn.
    pub fn eval<F: Fn(P, Motion) -> P>(&mut self, symbol: char, motion: &F) -> (r: Outcome<P>)
        requires
            forall|p: P, m: Motion| motion.requires((p, m)),
        ensures
            !(command_spec(symbol) is PopState) ==> final(self).state().pen == pen_next(
                old(self).state().pen,
                command_spec(symbol),
            ),
            match command_spec(symbol) {
                Command::Forward => Self::moves(*old(self), *final(self), *motion, Motion::Forward)
                    && r == Outcome::Moved(
                    TurtleMovement {
                        from: old(self).state().place,
                        to: final(self).state().place,
                        draw: old(self).state().pen,
                    },
                ),
                Command::TurnLeft => Self::moves(
                    *old(self),
                    *final(self),
                    *motion,
                    Motion::TurnLeft,
                ) && r == Outcome::Moved(still(final(self).state().place)),
                Command::TurnRight => Self::moves(
                    *old(self),
                    *final(self),
                    *motion,
                    Motion::TurnRight,
                ) && r == Outcome::Moved(still(final(self).state().place)),
                Command::PushState => Self::pushes(*old(self), *final(self)) && r == Outcome::Moved(
                    still(old(self).state().place),
                ),
                Command::PopState => if old(self).saved().len() > 0 {
                    Self::pops(*old(self), *final(self)) && r == Outcome::Moved(
                        TurtleMovement {
                            from: old(self).state().place,
                            to: final(self).state().place,
                            draw: false,
                        },
                    )
                } else {
                    *final(self) == *old(self) && r == Outcome::<P>::UnbalancedPop
                },
                Command::PenUp => Self::sets_pen(*old(self), *final(self), false) && r
                    == Outcome::Moved(still(old(self).state().place)),
                Command::PenDown => Self::sets_pen(*old(self), *final(self), true) && r
                    == Outcome::Moved(still(old(self).state().place)),
                Command::Unrecognized(c) => *final(self) == *old(self) && r == Outcome::Unrecognized(
                    c,
                    still(old(self).state().place),
                ),
            },
    {
        match command_of(symbol) {
            Command::Forward => Outcome::Moved(self.forward(motion)),
            Command::TurnLeft => Outcome::Moved(self.turn_left(motion)),
            Command::TurnRight => Outcome::Moved(self.turn_right(motion)),
            Command::PushState => Outcome::Moved(self.push()),
            Command::PopState => {
                if self.stack.len() == 0 {
                    Outcome::UnbalancedPop
                } else {
                    Outcome::Moved(self.pop())
                }
            },
            Command::PenUp => Outcome::Moved(self.up()),
            Command::PenDown => Outcome::Moved(self.down()),
            Command::Unrecognized(c) => Outcome::Unrecognized(c, TurtleMovement::none(self)),
        }
    }
}

/// Saving a pose and restoring it at once gives back the turtle as it was:
/// the same place, heading and pen, and the same saved poses.
pub proof fn lemma_push_pop_round_trip<P: Copy>(t0: Turtle<P>, t1: Turtle<P>, t2: Turtle<P>)
    requires
        Turtle::pushes(t0, t1),
        Turtle::pops(t1, t2),
    ensures
        t2.state() == t0.state(),
        t2.saved() == t0.saved(),
{
    assert(t0.saved().push(t0.state()).drop_last() =~= t0.saved());
}

/// The pen after a run of commands, none of them a restore, begun with `pen`.
pub open spec fn pen_through(pen: bool, cmds: Seq<Command>) -> bool
    decreases cmds.len(),
{
    if cmds.len() == 0 {
        pen
    } else {
        pen_next(pen_through(pen, cmds.drop_last()), cmds.last())
    }
}

/// Whether step `i` of a run begun with `pen` draws: a forward step with the pen down.
pub open spec fn draws(pen: bool, cmds: Seq<Command>, i: int) -> bool {
    cmds[i] is Forward && pen_through(pen, cmds.take(i))
}

/// Whether command `k` lifts or lowers the pen or restores a saved pose.
pub open spec fn sets_or_restores_pen(cmds: Seq<Command>, k: int) -> bool {
    cmds[k] is PenUp || cmds[k] is PenDown || cmds[k] is PopState
}

proof fn lemma_pen_held(pen: bool, cmds: Seq<Command>, i: int, j: int)
    requires
        0 <= i < j <= cmds.len(),
        cmds[i] is PenUp || cmds[i] is PenDown,
        forall|k: int| i < k < j ==> !sets_or_restores_pen(cmds, k),
    ensures
        pen_through(pen, cmds.take(j)) == (cmds[i] is PenDown),
    decreases j,
{
    assert(cmds.take(j).drop_last() =~= cmds.take(j - 1));
    assert(cmds.take(j).last() == cmds[j - 1]);
    if j - 1 > i {
        lemma_pen_held(pen, cmds, i, j - 1);
        assert(!sets_or_restores_pen(cmds, j - 1));
    }
}

/// Pen toggling: in a run of commands, a forward step after a pen-up draws
/// nothing and one after a pen-down draws, as long as no pen command or restore
/// of a saved pose comes between them.
pub proof fn lemma_pen_toggling(pen: bool, cmds: Seq<Command>, i: int, j: int)
    requires
        0 <= i < j < cmds.len(),
        cmds[i] is PenUp || cmds[i] is PenDown,
        cmds[j] is Forward,
        forall|k: int| i < k < j ==> !sets_or_restores_pen(cmds, k),
    ensures
        draws(pen, cmds, j) == (cmds[i] is PenDown),
{
    lemma_pen_held(pen, cmds, i, j);
}

} // verus!
