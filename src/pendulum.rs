//! The per-pendulum state record and the simulation's configuration.
use vstd::prelude::*;
use crate::error::SimError;

verus! {

/// One bob on a massless rigid rod. The angle is in nanoradians from the
/// vertical rest position, the angular velocity in nanoradians per second,
/// and the rod length, fixed at creation and always positive, in
/// billionths of a length unit.
pub struct Pendulum {
    angle: i64,
    angular_velocity: i64,
    length: i64,
}

/// The mathematical state of a pendulum.
pub ghost struct PendulumView {
    pub angle: int,
    pub angular_velocity: int,
    pub length: int,
}

impl View for Pendulum {
    type V = PendulumView;

    closed spec fn view(&self) -> PendulumView {
        PendulumView {
            angle: self.angle as int,
            angular_velocity: self.angular_velocity as int,
            length: self.length as int,
        }
    }
}

/// What the rendering side reads of a pendulum.
#[derive(Clone, Copy, Debug, PartialEq, Eq, Structural)]
pub struct Snapshot {
    pub angle: i64,
    pub length: i64,
}

/// Physical constants shared by every pendulum of a simulation.
///
/// The angular acceleration of a pendulum is `-(g / length) * sin(angle)`,
/// with `g` divided by the pendulum's own rod length. A coefficient that
/// already folds the length in (`g / l` as one number) is had by giving
/// the pendulum a length of one unit.
#[derive(Clone, Copy, Debug, PartialEq, Eq, Structural)]
pub struct SimConfig {
    /// Gravitational acceleration, in billionths of a length unit per
    /// second squared.
    pub g: i64,
    /// Fraction of the angular velocity lost per second, in billionths;
    /// zero for an undamped simulation.
    pub damping_rate: i64,
}

impl Pendulum {
    #[verifier::type_invariant]
    spec fn length_positive(self) -> bool {
        self.length > 0
    }

    /// Brings into scope what any pendulum's view satisfies: a positive
    /// length and fields that fit an `i64`.
    pub(crate) fn establish_valid(&self)
        ensures
            self@.length > 0,
            i64::MIN <= self@.angle <= i64::MAX,
            i64::MIN <= self@.angular_velocity <= i64::MAX,
            self@.length <= i64::MAX,
    {
        proof {
            use_type_invariant(self);
        }
    }

    /// Builds a pendulum; a rod length that is not positive is refused.
    pub fn new(angle: i64, angular_velocity: i64, length: i64) -> (r: Result<Pendulum, SimError>)
        ensures
            length > 0 <==> r is Ok,
            length <= 0 ==> r == Err::<Pendulum, SimError>(SimError::NumericalFault),
            r matches Ok(p) ==> p@ == (PendulumView {
                angle: angle as int,
                angular_velocity: angular_velocity as int,
                length: length as int,
            }),
    {
        if length <= 0 {
            Err(SimError::NumericalFault)
        } else {
            Ok(Pendulum { angle, angular_velocity, length })
        }
    }

    pub fn angle(&self) -> (r: i64)
        ensures
            r == self@.angle,
    {
        self.angle
    }

    pub fn angular_velocity(&self) -> (r: i64)
        ensures
            r == self@.angular_velocity,
    {
        self.angular_velocity
    }

    pub fn length(&self) -> (r: i64)
        ensures
            r == self@.length,
    {
        self.length
    }

    /// The one way to change a pendulum's motion, kept to the integrator:
    /// the same rod with a new angle and angular velocity.
    pub(crate) fn moved_to(&self, angle: i64, angular_velocity: i64) -> (r: Pendulum)
        ensures
            r@ == (PendulumView {
                angle: angle as int,
                angular_velocity: angular_velocity as int,
                length: self@.length,
            }),
    {
        proof {
            use_type_invariant(self);
        }
        Pendulum { angle, angular_velocity, length: self.length }
    }

    pub fn snapshot(&self) -> (r: Snapshot)
        ensures
            r.angle == self@.angle,
            r.length == self@.length,
    {
        Snapshot { angle: self.angle, length: self.length }
    }
}

/// A read-only copy of the angle and length of each pendulum, in order,
/// for a rendering pass.
pub fn snapshot(pendulums: &Vec<Pendulum>) -> (r: Vec<Snapshot>)
    ensures
        r.len() == pendulums.len(),
        forall|i: int|
            0 <= i < r.len() ==> r[i].angle == pendulums[i]@.angle && r[i].length
                == pendulums[i]@.length,
{
    let mut r: Vec<Snapshot> = Vec::new();
    let mut i: usize = 0;
    while i < pendulums.len()
        invariant
            i <= pendulums.len(),
            r.len() == i,
            forall|j: int|
                0 <= j < i ==> r[j].angle == pendulums[j]@.angle && r[j].length
                    == pendulums[j]@.length,
        decreases pendulums.len() - i,
    {
        r.push(pendulums[i].snapshot());
        i = i + 1;
    }
    r
}

} // verus!
