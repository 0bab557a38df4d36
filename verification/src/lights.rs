//! The demo scene's switchable lights.
//!
//! A light is either a point light or a projector. Each carries a location
//! and three intensity factors; the renderer receives them together with a
//! mode number — the light's kind while it is turned on, zero while it is
//! off. The numeric fields are raw 32-bit encodings of the renderer's
//! scalars: the library stores and hands them back without interpreting
//! them.

use vstd::prelude::*;

verus! {

/// Three raw scalar encodings: a location or a direction.
#[derive(Clone, Copy, PartialEq, Eq, Structural, Debug)]
pub struct Vec3Bits {
    pub x: u32,
    pub y: u32,
    pub z: u32,
}

/// What every light carries: its switch, its location and its ambient,
/// diffuse and specular intensity factors.
#[derive(Clone, Copy, PartialEq, Eq, Structural, Debug)]
pub struct CommonLightData {
    pub turned_on: bool,
    pub location: Vec3Bits,
    pub ambient: u32,
    pub diffuse: u32,
    pub specular: u32,
}

impl CommonLightData {
    /// A light's shared data starts turned on.
    pub fn new(location: Vec3Bits, ambient: u32, diffuse: u32, specular: u32) -> (r: Self)
        ensures
            r == (CommonLightData { turned_on: true, location, ambient, diffuse, specular }),
    {
        CommonLightData { turned_on: true, location, ambient, diffuse, specular }
    }

    /// The mode number the renderer receives: the light's own mode while
    /// the switch is on, zero while it is off.
    pub fn uniform_mode(&self, mode: i32) -> (r: i32)
        ensures
            r == if self.turned_on {
                mode
            } else {
                0
            },
    {
        if self.turned_on {
            mode
        } else {
            0
        }
    }
}

/// A light shining equally in every direction.
#[derive(Clone, Copy, PartialEq, Eq, Structural, Debug)]
pub struct PointLight {
    pub data: CommonLightData,
}

impl PointLight {
    /// A point light at `location`, turned on.
    pub fn new(location: Vec3Bits, ambient: u32, diffuse: u32, specular: u32) -> (r: Self)
        ensures
            r.data == (CommonLightData { turned_on: true, location, ambient, diffuse, specular }),
    {
        PointLight { data: CommonLightData::new(location, ambient, diffuse, specular) }
    }

    /// Whether the switch is on.
    pub fn is_turned(&self) -> (r: bool)
        ensures
            r == self.data.turned_on,
    {
        self.data.turned_on
    }

    /// Sets the switch, leaving everything else as it was.
    pub fn turn(&mut self, state: bool)
        ensures
            *final(self) == (PointLight {
                data: CommonLightData { turned_on: state, ..old(self).data },
            }),
    {
        self.data.turned_on = state;
    }

    /// The mode number the renderer receives: one while on, zero while
    /// off.
    pub fn uniform_mode(&self) -> (r: i32)
        ensures
            r == if self.data.turned_on {
                1int
            } else {
                0int
            },
    {
        self.data.uniform_mode(1)
    }
}

/// A light shining in one direction.
#[derive(Clone, Copy, PartialEq, Eq, Structural, Debug)]
pub struct ProjectorLight {
    pub data: CommonLightData,
    pub direction: Vec3Bits,
}

impl ProjectorLight {
    /// A projector at `location` shining along `direction`, turned on.
    pub fn new(
        location: Vec3Bits,
        direction: Vec3Bits,
        ambient: u32,
        diffuse: u32,
        specular: u32,
    ) -> (r: Self)
        ensures
            r.data == (CommonLightData { turned_on: true, location, ambient, diffuse, specular }),
            r.direction == direction,
    {
        ProjectorLight { data: CommonLightData::new(location, ambient, diffuse, specular), direction }
    }

    /// Whether the switch is on.
    pub fn is_turned(&self) -> (r: bool)
        ensures
            r == self.data.turned_on,
    {
        self.data.turned_on
    }

    /// Sets the switch, leaving everything else as it was.
    pub fn turn(&mut self, state: bool)
        ensures
            *final(self) == (ProjectorLight {
                data: CommonLightData { turned_on: state, ..old(self).data },
                direction: old(self).direction,
            }),
    {
        self.data.turned_on = state;
    }

    /// The mode number the renderer receives: two while on, zero while
    /// off.
    pub fn uniform_mode(&self) -> (r: i32)
        ensures
            r == if self.data.turned_on {
                2int
            } else {
                0int
            },
    {
        self.data.uniform_mode(2)
    }
}

/// Either kind of light.
#[derive(Clone, Copy, PartialEq, Eq, Structural, Debug)]
pub enum Light {
    Point(PointLight),
    Projector(ProjectorLight),
}

impl Light {
    /// Whether the switch is on.
    pub open spec fn spec_is_turned(self) -> bool {
        match self {
            Light::Point(p) => p.data.turned_on,
            Light::Projector(p) => p.data.turned_on,
        }
    }

    /// The light's kind as the renderer's mode number: one for a point
    /// light, two for a projector.
    pub open spec fn spec_mode(self) -> int {
        match self {
            Light::Point(_) => 1,
            Light::Projector(_) => 2,
        }
    }

    /// The same light with its switch set to `state`.
    pub open spec fn with_turned(self, state: bool) -> Light {
        match self {
            Light::Point(p) => Light::Point(
                PointLight { data: CommonLightData { turned_on: state, ..p.data } },
            ),
            Light::Projector(p) => Light::Projector(
                ProjectorLight {
                    data: CommonLightData { turned_on: state, ..p.data },
                    direction: p.direction,
                },
            ),
        }
    }

    /// The same light moved to `location`.
    pub open spec fn with_location(self, location: Vec3Bits) -> Light {
        match self {
            Light::Point(p) => Light::Point(
                PointLight { data: CommonLightData { location, ..p.data } },
            ),
            Light::Projector(p) => Light::Projector(
                ProjectorLight {
                    data: CommonLightData { location, ..p.data },
                    direction: p.direction,
                },
            ),
        }
    }

    /// Whether the switch is on.
    pub fn is_turned(&self) -> (r: bool)
        ensures
            r == self.spec_is_turned(),
    {
        match self {
            Light::Point(point) => point.is_turned(),
            Light::Projector(proj) => proj.is_turned(),
        }
    }

    /// Sets the switch, leaving everything else as it was.
    pub fn turn(&mut self, state: bool)
        ensures
            *final(self) == old(self).with_turned(state),
    {
        match self {
            Light::Point(point) => point.turn(state),
            Light::Projector(proj) => proj.turn(state),
        }
    }

    /// The mode number the renderer receives: the light's kind while it is
    /// on, zero while it is off.
    pub fn uniform_mode(&self) -> (r: i32)
        ensures
            r == if self.spec_is_turned() {
                self.spec_mode()
            } else {
                0
            },
    {
        match self {
            Light::Point(point) => point.uniform_mode(),
            Light::Projector(proj) => proj.uniform_mode(),
        }
    }

    /// Moves the light to `location`, leaving everything else as it was.
    pub fn set_location(&mut self, location: Vec3Bits)
        ensures
            *final(self) == old(self).with_location(location),
    {
        match self {
            Light::Point(point) => point.data.location = location,
            Light::Projector(proj) => proj.data.location = location,
        }
    }
}

/// The scene's lights in their fixed order: the orbiting sun first, the
/// projector second, the torch light after them.
pub struct SceneLights {
    pub all: Vec<Light>,
}

impl SceneLights {
    /// A scene with the given lights.
    pub fn new(all: Vec<Light>) -> (r: Self)
        ensures
            r.all@ == all@,
    {
        SceneLights { all }
    }

    /// Flips the sun's switch, leaving every other light as it was.
    pub fn turn_sun(&mut self)
        requires
            old(self).all@.len() >= 1,
        ensures
            final(self).all@ == old(self).all@.update(
                0,
                old(self).all@[0].with_turned(!old(self).all@[0].spec_is_turned()),
            ),
    {
        let state = !self.all[0].is_turned();
        self.all[0].turn(state);
    }

    /// Flips the projector's switch, leaving every other light as it was.
    pub fn turn_projector(&mut self)
        requires
            old(self).all@.len() >= 2,
        ensures
            final(self).all@ == old(self).all@.update(
                1,
                old(self).all@[1].with_turned(!old(self).all@[1].spec_is_turned()),
            ),
    {
        let state = !self.all[1].is_turned();
        self.all[1].turn(state);
    }
}

} // verus!
