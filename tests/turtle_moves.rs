use lsystem::turtle::{command_of, Command, Motion, Outcome, Pose, Turtle, TurtleMovement};
use std::f64::consts::PI;

#[derive(Clone, Copy, Debug, PartialEq)]
struct Place {
    x: f64,
    y: f64,
    rot: f64,
}

fn start(x: f64, y: f64) -> Place {
    Place { x, y, rot: PI / 2.0 }
}

fn motion(p: Place, m: Motion) -> Place {
    let step = 5.0;
    let spin = PI / 2.0;
    match m {
        Motion::Forward => Place { x: p.x + p.rot.cos() * step, y: p.y + p.rot.sin() * step, rot: p.rot },
        Motion::TurnLeft => Place { rot: p.rot + spin, ..p },
        Motion::TurnRight => Place { rot: p.rot - spin, ..p },
    }
}

fn moved(o: Outcome<Place>) -> TurtleMovement<Place> {
    match o {
        Outcome::Moved(m) => m,
        other => panic!("expected a movement, got {:?}", other),
    }
}

#[test]
fn forward_from_ten_ten() {
    let mut t = Turtle::new(start(10.0, 10.0));
    let m = moved(t.eval('f', &motion));
    assert_eq!((m.from.x, m.from.y), (10.0, 10.0));
    assert_eq!((m.to.x, m.to.y), (10.0, 15.0));
    assert!(m.draw);
}

#[test]
fn pop_on_empty_stack_is_unbalanced() {
    let mut t = Turtle::new(start(3.0, 4.0));
    assert_eq!(t.eval(']', &motion), Outcome::UnbalancedPop);
    let m = moved(t.eval('f', &motion));
    assert_eq!((m.from.x, m.from.y), (3.0, 4.0));
}

#[test]
fn push_then_pop_restores_pose() {
    let mut t = Turtle::new(start(0.0, 0.0));
    moved(t.eval('+', &motion));
    let before = moved(t.eval('[', &motion));
    let after = moved(t.eval(']', &motion));
    assert_eq!(after.from, before.to);
    assert_eq!(after.to, before.to);
    assert!(!after.draw);
}

#[test]
fn pop_restores_saved_place_and_pen() {
    let mut t = Turtle::new(start(0.0, 0.0));
    t.eval('[', &motion);
    t.eval('?', &motion);
    t.eval('f', &motion);
    t.eval('+', &motion);
    let back = moved(t.eval(']', &motion));
    assert_eq!((back.from.x.round(), back.from.y), (0.0, 5.0));
    assert_eq!(back.to, start(0.0, 0.0));
    assert!(!back.draw);
    let m = moved(t.eval('f', &motion));
    assert!(m.draw);
    assert_eq!((m.to.x.round(), m.to.y), (0.0, 5.0));
}

#[test]
fn pen_up_and_down_toggle_drawing() {
    let mut t = Turtle::new(start(0.0, 0.0));
    assert!(moved(t.eval('f', &motion)).draw);
    assert!(!moved(t.eval('?', &motion)).draw);
    assert!(!moved(t.eval('f', &motion)).draw);
    t.eval('+', &motion);
    assert!(!moved(t.eval('f', &motion)).draw);
    t.eval('!', &motion);
    assert!(moved(t.eval('f', &motion)).draw);
    assert!(moved(t.eval('f', &motion)).draw);
}

#[test]
fn turns_change_heading_only() {
    let mut t = Turtle::new(start(1.0, 1.0));
    let m = moved(t.eval('+', &motion));
    assert_eq!((m.from.x, m.from.y, m.to.x, m.to.y, m.draw), (1.0, 1.0, 1.0, 1.0, false));
    assert_eq!(m.to.rot, PI);
    let f = moved(t.eval('f', &motion));
    assert_eq!((f.to.x.round(), f.to.y.round()), (-4.0, 1.0));
    let r = moved(t.eval('-', &motion));
    assert_eq!(r.to.rot, PI / 2.0);
    assert!(!r.draw);
}

#[test]
fn unrecognized_symbol_changes_nothing() {
    let mut t = Turtle::new(start(2.0, 2.0));
    match t.eval('x', &motion) {
        Outcome::Unrecognized(c, m) => {
            assert_eq!(c, 'x');
            assert_eq!(m, TurtleMovement { from: start(2.0, 2.0), to: start(2.0, 2.0), draw: false });
        }
        other => panic!("unexpected {:?}", other),
    }
    let f = moved(t.eval('f', &motion));
    assert_eq!((f.from.x, f.from.y), (2.0, 2.0));
}

#[test]
fn direct_methods_match_eval() {
    let mut t = Turtle::new(start(0.0, 0.0));
    let p = t.push();
    assert_eq!(p, TurtleMovement::none(&t));
    let f = t.forward(&motion);
    assert_eq!(f.to.y, 5.0);
    t.up();
    assert!(!t.forward(&motion).draw);
    t.down();
    t.turn_left(&motion);
    t.turn_right(&motion);
    let back = t.pop();
    assert_eq!(back.to, start(0.0, 0.0));
    let _ = Pose { place: start(0.0, 0.0), pen: true };
}

#[test]
fn symbols_map_to_commands() {
    assert_eq!(command_of('f'), Command::Forward);
    assert_eq!(command_of('+'), Command::TurnLeft);
    assert_eq!(command_of('-'), Command::TurnRight);
    assert_eq!(command_of('['), Command::PushState);
    assert_eq!(command_of(']'), Command::PopState);
    assert_eq!(command_of('?'), Command::PenUp);
    assert_eq!(command_of('!'), Command::PenDown);
    assert_eq!(command_of('g'), Command::Unrecognized('g'));
}
